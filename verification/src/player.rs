pub mod errors;
pub mod player;
pub mod players;
pub mod turn;
