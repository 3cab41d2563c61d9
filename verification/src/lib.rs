pub mod game;
pub mod pipeline;
pub mod text;
