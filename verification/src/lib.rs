//! A rank-ordered leaderboard for time-boxed fitness competitions.
//!
//! The crate holds the decisions of the service and none of its transport:
//! every operation is a small state machine that asks for one cache command at
//! a time and is resumed with the reply. The same machines run against the
//! in-memory cache of this crate, where their end-to-end behaviour is proved,
//! and against a remote store, where a caller performs the commands.

pub mod text;
pub mod time;
pub mod models;
pub mod keys;
pub mod ranking;
pub mod table;
pub mod port;
pub mod cache;
pub mod operation;
pub mod leaderboard;
pub mod scoring;
pub mod prizes;
pub mod fitness;
pub mod standings;
pub mod services;
pub mod laws;
pub mod config;
pub mod auth;
pub mod handlers;
pub mod websocket;
