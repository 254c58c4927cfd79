//! The core of a chat bot's osu! module: it resolves what a command refers
//! to (a player, a beatmap, the beatmap last talked about in a channel),
//! keeps what was fetched so that nothing is fetched or computed twice, and
//! runs the protocol that links a chat identity to a game account.
//!
//! Nothing here talks to the network or the disk. Where a step needs the
//! game's service or a download, the library hands back what to ask for and
//! takes the answer in a second call.

pub mod args;
pub mod beatmap_cache;
pub mod commands;
pub mod db;
pub mod env;
pub mod hook;
pub mod length;
pub mod link;
pub mod mode;
pub mod models;
pub mod mods;
pub mod oppai_cache;
pub mod ranking;
pub mod resolver;
pub mod text;
