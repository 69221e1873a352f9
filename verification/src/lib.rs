//! Data model and decision logic of LeagueCord: temporary Discord voice
//! groups for League of Legends players, created from a website.
pub mod clock;
pub mod shared;
pub mod text;
pub mod data;
pub mod bot;
pub mod server;
pub mod front;
pub mod laws;
