pub mod game;
pub mod protocol;
pub mod registry;
pub mod room;
pub mod session;
pub mod solo;
