//! Verified core of a Discord bot that links server members to game
//! accounts: configuration checks, text formatting of player notes,
//! role planning and the decisions taken on Discord events.

pub mod api;
pub mod bulk;
pub mod commands;
pub mod config;
pub mod embed;
pub mod events;
pub mod notes;
pub mod player;
pub mod roles;
pub mod table;
pub mod text;
