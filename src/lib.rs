//! Turn notifications for Terraforming Mars games.
//!
//! The library keeps a registry of alert subscriptions, reconciles it against
//! the observed state of the games, decides which notifications are armed or
//! cancelled, keeps at most one pending notification task per alert, stores
//! the registry, parses chat commands and formats the answers.
//!
//! - [`alert`], [`alerts_map`]: an alert and the registry of alerts by game.
//! - [`scheduler`]: the table of pending notification tasks.
//! - [`controller`]: reconciliation of the registry against the games.
//! - [`loader`]: the registry as stored text.
//! - [`tmars`], [`sync`]: games as the game server describes them.
//! - [`command`], [`commands`], [`markdown_response`]: chat commands.
//! - [`config`], [`utils`]: settings and paths.
//! - [`id_map`], [`text`]: a map keyed by strings, and string helpers.

pub mod alert;
pub mod alerts_map;
pub mod command;
pub mod commands;
pub mod config;
pub mod controller;
pub mod id_map;
pub mod loader;
pub mod markdown_response;
pub mod scheduler;
pub mod sync;
pub mod text;
pub mod tmars;
pub mod utils;
