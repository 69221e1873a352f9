//! The decisions of the Discord bot's handlers. The handlers themselves,
//! which talk to Discord, live with the program.
pub mod door;

pub use door::Door;
pub mod debug;

pub mod leaguecord;
pub mod player_helper;
pub mod purge;

pub use leaguecord::{module_loaded_message, LeagueCord};
pub use player_helper::PlayerHelper;
pub use purge::Purge;
pub mod command;
